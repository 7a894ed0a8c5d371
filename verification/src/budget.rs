//! Token budget accounting: daily and monthly cloud-token counters with
//! limits, calendar rollover, and a debounced decision on when the state
//! is due to be written out.

use vstd::prelude::*;
use crate::calendar::{date_of, day_key, month_key, day_month_keys};
use crate::clock::now_secs;
use crate::config::BudgetConfig;
use crate::json::same_text;

verus! {

broadcast use vstd::string::group_string_axioms;

/// Persistent budget state.
#[derive(Debug, Clone)]
pub struct BudgetState {
    /// Day key (YYYY-MM-DD) for daily budget tracking.
    pub day: String,
    /// Month key (YYYY-MM) for monthly budget tracking.
    pub month: String,
    /// Tokens consumed today.
    pub daily_tokens: u64,
    /// Tokens consumed this month.
    pub monthly_tokens: u64,
    /// Epoch seconds of last update.
    pub last_updated: u64,
}

/// Read-only snapshot for passing into the pipeline context and logging.
#[derive(Debug, Clone, Copy)]
pub struct BudgetSnapshot {
    pub daily_tokens: u64,
    pub daily_limit: u64,
    pub monthly_tokens: u64,
    pub monthly_limit: u64,
}

/// Day key of the instant `secs` seconds after the epoch.
pub open spec fn day_key_at(secs: int) -> Seq<char> {
    let (y, m, d) = date_of(secs / 86400);
    day_key(y, m, d)
}

/// Month key of the instant `secs` seconds after the epoch.
pub open spec fn month_key_at(secs: int) -> Seq<char> {
    let (y, m, d) = date_of(secs / 86400);
    month_key(y, m)
}

/// A state with nothing spent, dated at `secs`.
pub open spec fn is_fresh_at(s: BudgetState, secs: int) -> bool {
    &&& s.day@ == day_key_at(secs)
    &&& s.month@ == month_key_at(secs)
    &&& s.daily_tokens == 0
    &&& s.monthly_tokens == 0
    &&& s.last_updated == secs
}

/// Daily count once the day key is `today`: kept on the same day, else 0.
pub open spec fn daily_after_rollover(s: BudgetState, today: Seq<char>) -> int {
    if s.day@ == today { s.daily_tokens as int } else { 0 }
}

/// Monthly count once the month key is `this_month`: kept in the same month, else 0.
pub open spec fn monthly_after_rollover(s: BudgetState, this_month: Seq<char>) -> int {
    if s.month@ == this_month { s.monthly_tokens as int } else { 0 }
}

/// Adding `tokens` to the counters as they stand after rolling over to the
/// day and month of `now` stays within `u64`.
pub open spec fn fits_after_rollover(s: BudgetState, tokens: u64, now: u64) -> bool {
    &&& daily_after_rollover(s, day_key_at(now as int)) + tokens <= u64::MAX
    &&& monthly_after_rollover(s, month_key_at(now as int)) + tokens <= u64::MAX
}

/// Spending `est` more tokens stays within both limits (0 = unlimited).
pub open spec fn affordable(cfg: BudgetConfig, daily: int, monthly: int, est: int) -> bool {
    &&& (cfg.daily_limit == 0 || daily + est <= cfg.daily_limit)
    &&& (cfg.monthly_limit == 0 || monthly + est <= cfg.monthly_limit)
}

/// The debounced write is due: at least `interval` seconds (counted modulo
/// 2^64, as `u64` subtraction wraps) since the last write.
pub open spec fn persist_due(now: u64, last: u64, interval: u64) -> bool {
    (if now >= last { now - last } else { now + 0x1_0000_0000_0000_0000 - last }) >= interval
}

/// Keys of the instant `secs`.
fn keys_at(secs: u64) -> (r: (String, String))
    ensures
        r.0@ == day_key_at(secs as int),
        r.1@ == month_key_at(secs as int),
{
    day_month_keys(secs / 86400)
}

/// Current `(YYYY-MM-DD, YYYY-MM)` keys, from the wall clock.
pub fn current_day_month() -> (r: (String, String))
    ensures
        exists|secs: u64| r.0@ == day_key_at(secs as int) && r.1@ == month_key_at(secs as int),
{
    let now = now_secs();
    keys_at(now)
}

impl BudgetState {
    /// A state with nothing spent, dated at `now` (seconds since the epoch).
    pub fn fresh_at(now: u64) -> (r: Self)
        ensures
            is_fresh_at(r, now as int),
    {
        let (day, month) = keys_at(now);
        Self { day, month, daily_tokens: 0, monthly_tokens: 0, last_updated: now }
    }

    /// Moves the state to the given day and month keys: a counter is reset
    /// when its key changes and kept otherwise.
    pub fn roll_over(&mut self, today: String, this_month: String)
        ensures
            final(self).day@ == today@,
            final(self).month@ == this_month@,
            final(self).daily_tokens == daily_after_rollover(*old(self), today@),
            final(self).monthly_tokens == monthly_after_rollover(*old(self), this_month@),
            final(self).last_updated == old(self).last_updated,
    {
        if !same_text(self.day.as_str(), today.as_str()) {
            self.daily_tokens = 0;
        }
        self.day = today;
        if !same_text(self.month.as_str(), this_month.as_str()) {
            self.monthly_tokens = 0;
        }
        self.month = this_month;
    }
}

impl Default for BudgetState {
    /// A state with nothing spent, dated now.
    fn default() -> (r: Self)
        ensures
            is_fresh_at(r, r.last_updated as int),
    {
        BudgetState::fresh_at(now_secs())
    }
}

/// Token budget manager with debounced persistence: it keeps the counters
/// and tells its caller when the state is due to be written out.
pub struct BudgetManager {
    config: BudgetConfig,
    state: BudgetState,
    last_persisted: u64,
}

impl BudgetManager {
    /// The limits the manager enforces.
    pub closed spec fn config_of(&self) -> BudgetConfig {
        self.config
    }

    /// The counters.
    pub closed spec fn state_of(&self) -> BudgetState {
        self.state
    }

    /// Epoch seconds of the last write of the state.
    pub closed spec fn last_persisted_of(&self) -> u64 {
        self.last_persisted
    }

    /// A manager with nothing spent, started now.
    pub fn new(config: BudgetConfig) -> (r: Self)
        ensures
            r.config_of() == config,
            is_fresh_at(r.state_of(), r.last_persisted_of() as int),
    {
        Self::starting_at(config, now_secs())
    }

    /// A manager with nothing spent, started at `now`.
    pub fn starting_at(config: BudgetConfig, now: u64) -> (r: Self)
        ensures
            r.config_of() == config,
            is_fresh_at(r.state_of(), now as int),
            r.last_persisted_of() == now,
    {
        Self { config, state: BudgetState::fresh_at(now), last_persisted: now }
    }

    /// A manager that resumes a saved state at `now`, rolling it over to the
    /// current day and month.
    pub fn from_saved(config: BudgetConfig, saved: BudgetState, now: u64) -> (r: Self)
        ensures
            r.config_of() == config,
            r.state_of().day@ == day_key_at(now as int),
            r.state_of().month@ == month_key_at(now as int),
            r.state_of().daily_tokens == daily_after_rollover(saved, day_key_at(now as int)),
            r.state_of().monthly_tokens == monthly_after_rollover(saved, month_key_at(now as int)),
            r.state_of().last_updated == saved.last_updated,
            r.last_persisted_of() == now,
    {
        let mut state = saved;
        let (today, this_month) = keys_at(now);
        state.roll_over(today, this_month);
        Self { config, state, last_persisted: now }
    }

    /// Can `estimated_tokens` more be spent within both the daily and the
    /// monthly limit? A limit of 0 is unlimited.
    pub fn can_afford(&self, estimated_tokens: u64) -> (r: bool)
        ensures
            r == affordable(
                self.config_of(),
                self.state_of().daily_tokens as int,
                self.state_of().monthly_tokens as int,
                estimated_tokens as int,
            ),
    {
        let daily_ok = self.config.daily_limit == 0 || (estimated_tokens <= self.config.daily_limit
            && self.state.daily_tokens <= self.config.daily_limit - estimated_tokens);
        let monthly_ok = self.config.monthly_limit == 0 || (estimated_tokens
            <= self.config.monthly_limit && self.state.monthly_tokens <= self.config.monthly_limit
            - estimated_tokens);
        daily_ok && monthly_ok
    }

    /// Records token usage at the current time; returns whether the state is
    /// due to be written out. Local models are tracked but do not count
    /// against the budget.
    pub fn record(&mut self, tokens: u64, is_local: bool) -> (persist: bool)
        requires
            !is_local ==> forall|now: u64| #[trigger] fits_after_rollover(old(self).state_of(), tokens, now),
        ensures
            final(self).config_of() == old(self).config_of(),
            tokens == 0 ==> *final(self) == *old(self) && !persist,
            tokens > 0 ==> exists|now: u64| #[trigger] day_key_at(now as int) == final(self).state_of().day@
                && recorded(*old(self), *final(self), tokens, is_local, now, persist),
    {
        let now = now_secs();
        assert(!is_local ==> fits_after_rollover(self.state_of(), tokens, now));
        self.record_at(tokens, is_local, now)
    }

    /// Records token usage at `now`; returns whether the state is due to be
    /// written out.
    pub fn record_at(&mut self, tokens: u64, is_local: bool, now: u64) -> (persist: bool)
        requires
            !is_local ==> fits_after_rollover(old(self).state_of(), tokens, now),
        ensures
            tokens == 0 ==> *final(self) == *old(self) && !persist,
            tokens > 0 ==> recorded(*old(self), *final(self), tokens, is_local, now, persist),
            final(self).config_of() == old(self).config_of(),
    {
        if tokens == 0 {
            return false;
        }
        let (today, this_month) = keys_at(now);
        self.state.roll_over(today, this_month);
        if !is_local {
            self.state.daily_tokens = self.state.daily_tokens + tokens;
            self.state.monthly_tokens = self.state.monthly_tokens + tokens;
        }
        self.state.last_updated = now;
        self.maybe_persist_at(now)
    }

    /// Debounce: the write is due when enough time has passed since the
    /// last one, which is then taken to happen at `now`.
    fn maybe_persist_at(&mut self, now: u64) -> (persist: bool)
        ensures
            final(self).config == old(self).config,
            final(self).state == old(self).state,
            persist == persist_due(now, old(self).last_persisted, old(self).config.persist_interval_secs),
            final(self).last_persisted == if persist { now } else { old(self).last_persisted },
    {
        if now.wrapping_sub(self.last_persisted) < self.config.persist_interval_secs {
            return false;
        }
        self.last_persisted = now;
        true
    }

    /// The counters and limits.
    pub fn snapshot(&self) -> (r: BudgetSnapshot)
        ensures
            r.daily_tokens == self.state_of().daily_tokens,
            r.daily_limit == self.config_of().daily_limit,
            r.monthly_tokens == self.state_of().monthly_tokens,
            r.monthly_limit == self.config_of().monthly_limit,
    {
        BudgetSnapshot {
            daily_tokens: self.state.daily_tokens,
            daily_limit: self.config.daily_limit,
            monthly_tokens: self.state.monthly_tokens,
            monthly_limit: self.config.monthly_limit,
        }
    }

    /// The state, as it is to be written out.
    pub fn state(&self) -> (r: &BudgetState)
        ensures
            *r == self.state_of(),
    {
        &self.state
    }
}

/// What recording `tokens` (non-zero) at `now` does: the counters roll over
/// to the day and month of `now`, cloud tokens are added to both, local ones
/// to neither, the state is dated `now`, and a write is due per the debounce.
pub open spec fn recorded(
    before: BudgetManager,
    after: BudgetManager,
    tokens: u64,
    is_local: bool,
    now: u64,
    persist: bool,
) -> bool {
    let added = if is_local { 0int } else { tokens as int };
    &&& after.config_of() == before.config_of()
    &&& after.state_of().day@ == day_key_at(now as int)
    &&& after.state_of().month@ == month_key_at(now as int)
    &&& after.state_of().daily_tokens == daily_after_rollover(before.state_of(), day_key_at(now as int)) + added
    &&& after.state_of().monthly_tokens == monthly_after_rollover(before.state_of(), month_key_at(now as int)) + added
    &&& after.state_of().last_updated == now
    &&& persist == persist_due(now, before.last_persisted_of(), before.config_of().persist_interval_secs)
    &&& after.last_persisted_of() == if persist { now } else { before.last_persisted_of() }
}

/// With both limits at 0 (unlimited), every amount is affordable.
pub proof fn law_unlimited_always_affords(cfg: BudgetConfig, daily: int, monthly: int, est: int)
    requires
        cfg.daily_limit == 0,
        cfg.monthly_limit == 0,
    ensures
        affordable(cfg, daily, monthly, est),
{
}

/// Recording tokens of a local model leaves the spent amounts as the
/// rollover alone leaves them.
pub proof fn law_local_tokens_not_counted(
    before: BudgetManager,
    after: BudgetManager,
    tokens: u64,
    now: u64,
    persist: bool,
)
    requires
        recorded(before, after, tokens, true, now, persist),
    ensures
        after.state_of().daily_tokens == daily_after_rollover(before.state_of(), day_key_at(now as int)),
        after.state_of().monthly_tokens == monthly_after_rollover(before.state_of(), month_key_at(now as int)),
{
}

/// On the day of the last update, recording `n` cloud tokens makes an
/// estimate `e` affordable exactly when `n + e` was affordable before.
pub proof fn law_recorded_tokens_reduce_headroom(
    before: BudgetManager,
    after: BudgetManager,
    n: u64,
    now: u64,
    persist: bool,
    e: int,
)
    requires
        recorded(before, after, n, false, now, persist),
        before.state_of().day@ == day_key_at(now as int),
        before.state_of().month@ == month_key_at(now as int),
    ensures
        affordable(
            after.config_of(),
            after.state_of().daily_tokens as int,
            after.state_of().monthly_tokens as int,
            e,
        ) == affordable(
            before.config_of(),
            before.state_of().daily_tokens as int,
            before.state_of().monthly_tokens as int,
            n + e,
        ),
{
}

/// Recording `n` cloud tokens on the day and in the month of the last
/// update adds `n` to both counters.
pub proof fn law_cloud_tokens_counted(
    before: BudgetManager,
    after: BudgetManager,
    n: u64,
    now: u64,
    persist: bool,
)
    requires
        recorded(before, after, n, false, now, persist),
        before.state_of().day@ == day_key_at(now as int),
        before.state_of().month@ == month_key_at(now as int),
    ensures
        after.state_of().daily_tokens == before.state_of().daily_tokens + n,
        after.state_of().monthly_tokens == before.state_of().monthly_tokens + n,
{
}

/// A state written after recording at `now` and resumed at `later` keeps
/// its daily count only on the same day and its monthly count only in the
/// same month; otherwise the count starts again at 0.
pub proof fn law_reload_rolls_over(
    before: BudgetManager,
    after: BudgetManager,
    n: u64,
    is_local: bool,
    now: u64,
    persist: bool,
    later: u64,
)
    requires
        recorded(before, after, n, is_local, now, persist),
    ensures
        daily_after_rollover(after.state_of(), day_key_at(later as int)) == if day_key_at(later as int)
            == day_key_at(now as int) {
            after.state_of().daily_tokens as int
        } else {
            0
        },
        monthly_after_rollover(after.state_of(), month_key_at(later as int)) == if month_key_at(
            later as int,
        ) == month_key_at(now as int) {
            after.state_of().monthly_tokens as int
        } else {
            0
        },
{
}

} // verus!
