//! Gas accounting for detected patterns and whole analysis sessions.

use vstd::prelude::*;

verus! {

/// Gas cost associated with a single pattern/finding.
#[derive(Debug, Clone, PartialEq)]
pub struct PatternGasCost {
    /// The rule that detected the pattern.
    pub rule_id: String,
    /// Estimated gas used *before* applying the fix.
    pub before_gas: u64,
    /// Estimated gas used *after* applying the fix.
    pub after_gas: u64,
    /// File the pattern was found in.
    pub file: String,
    /// Line number of the pattern.
    pub line: u32,
}

/// Gas saved on one pattern: the drop from before to after, never negative.
pub open spec fn saved(e: PatternGasCost) -> int {
    if e.before_gas >= e.after_gas {
        e.before_gas - e.after_gas
    } else {
        0
    }
}

/// Sum of the `before_gas` of the first `n` entries.
pub open spec fn sum_before(es: Seq<PatternGasCost>, n: int) -> int
    decreases n,
{
    if n <= 0 {
        0
    } else {
        sum_before(es, n - 1) + es[n - 1].before_gas
    }
}

/// Sum of the `after_gas` of the first `n` entries.
pub open spec fn sum_after(es: Seq<PatternGasCost>, n: int) -> int
    decreases n,
{
    if n <= 0 {
        0
    } else {
        sum_after(es, n - 1) + es[n - 1].after_gas
    }
}

/// Sum of the savings of the first `n` entries.
pub open spec fn sum_saved(es: Seq<PatternGasCost>, n: int) -> int
    decreases n,
{
    if n <= 0 {
        0
    } else {
        sum_saved(es, n - 1) + saved(es[n - 1])
    }
}

impl PatternGasCost {
    /// A cost record for one pattern.
    pub fn new(rule_id: &str, file: &str, line: u32, before_gas: u64, after_gas: u64) -> (r: Self)
        ensures
            r.rule_id@ == rule_id@,
            r.file@ == file@,
            r.line == line,
            r.before_gas == before_gas,
            r.after_gas == after_gas,
    {
        PatternGasCost {
            rule_id: crate::text::owned(rule_id),
            file: crate::text::owned(file),
            line,
            before_gas,
            after_gas,
        }
    }

    /// Gas saved by applying the fix (saturating — never negative).
    pub fn savings(&self) -> (r: u64)
        ensures
            r == saved(*self),
    {
        self.before_gas.saturating_sub(self.after_gas)
    }
}

/// Aggregated gas metrics for an entire analysis session.
#[derive(Debug, Clone)]
pub struct GasReport {
    pub entries: Vec<PatternGasCost>,
}

impl Default for GasReport {
    fn default() -> (r: Self)
        ensures
            r.entries@ == Seq::<PatternGasCost>::empty(),
    {
        GasReport { entries: Vec::new() }
    }
}

proof fn lemma_saved_le_before(es: Seq<PatternGasCost>, n: int)
    requires
        0 <= n <= es.len(),
    ensures
        0 <= sum_saved(es, n) <= sum_before(es, n),
        sum_before(es, n) - sum_after(es, n) <= sum_saved(es, n),
        0 <= sum_before(es, n),
        0 <= sum_after(es, n),
    decreases n,
{
    if n > 0 {
        lemma_saved_le_before(es, n - 1);
    }
}

proof fn lemma_sums_mono(es: Seq<PatternGasCost>, n: int, m: int)
    requires
        0 <= n <= m <= es.len(),
    ensures
        sum_before(es, n) <= sum_before(es, m),
        sum_after(es, n) <= sum_after(es, m),
    decreases m,
{
    if n < m {
        lemma_sums_mono(es, n, m - 1);
    }
}

impl GasReport {
    /// Total estimated gas before fixes, as a mathematical sum.
    pub open spec fn before_total(&self) -> int {
        sum_before(self.entries@, self.entries@.len() as int)
    }

    /// Total estimated gas after fixes, as a mathematical sum.
    pub open spec fn after_total(&self) -> int {
        sum_after(self.entries@, self.entries@.len() as int)
    }

    /// Total gas saved, as a mathematical sum.
    pub open spec fn saved_total(&self) -> int {
        sum_saved(self.entries@, self.entries@.len() as int)
    }

    /// Adds one pattern's costs.
    pub fn push(&mut self, entry: PatternGasCost)
        ensures
            final(self).entries@ == old(self).entries@.push(entry),
    {
        self.entries.push(entry);
    }

    /// Total estimated gas *before* fixes.
    pub fn total_before(&self) -> (r: u64)
        requires
            self.before_total() <= u64::MAX,
        ensures
            r == self.before_total(),
    {
        let mut total: u64 = 0;
        let mut i: usize = 0;
        while i < self.entries.len()
            invariant
                i <= self.entries@.len(),
                total == sum_before(self.entries@, i as int),
                self.before_total() <= u64::MAX,
            decreases self.entries.len() - i,
        {
            proof {
                lemma_sums_mono(self.entries@, i + 1, self.entries@.len() as int);
                lemma_saved_le_before(self.entries@, i + 1);
            }
            total = total + self.entries[i].before_gas;
            i += 1;
        }
        total
    }

    /// Total estimated gas *after* fixes.
    pub fn total_after(&self) -> (r: u64)
        requires
            self.after_total() <= u64::MAX,
        ensures
            r == self.after_total(),
    {
        let mut total: u64 = 0;
        let mut i: usize = 0;
        while i < self.entries.len()
            invariant
                i <= self.entries@.len(),
                total == sum_after(self.entries@, i as int),
                self.after_total() <= u64::MAX,
            decreases self.entries.len() - i,
        {
            proof {
                lemma_sums_mono(self.entries@, i + 1, self.entries@.len() as int);
                lemma_saved_le_before(self.entries@, i + 1);
            }
            total = total + self.entries[i].after_gas;
            i += 1;
        }
        total
    }

    /// Total gas saved.
    pub fn total_savings(&self) -> (r: u64)
        requires
            self.saved_total() <= u64::MAX,
        ensures
            r == self.saved_total(),
    {
        let mut total: u64 = 0;
        let mut i: usize = 0;
        while i < self.entries.len()
            invariant
                i <= self.entries@.len(),
                total == sum_saved(self.entries@, i as int),
                self.saved_total() <= u64::MAX,
            decreases self.entries.len() - i,
        {
            proof {
                lemma_saved_mono(self.entries@, i + 1, self.entries@.len() as int);
            }
            total = total + self.entries[i].savings();
            i += 1;
        }
        total
    }
}

proof fn lemma_saved_mono(es: Seq<PatternGasCost>, n: int, m: int)
    requires
        0 <= n <= m <= es.len(),
    ensures
        0 <= sum_saved(es, n) <= sum_saved(es, m),
    decreases m,
{
    if n < m {
        lemma_saved_mono(es, n, m - 1);
    } else {
        lemma_saved_le_before(es, n);
    }
}

/// The total saved never exceeds the total spent before fixes, and it is at
/// least the drop from the total before to the total after.
pub proof fn law_savings_bounded(r: GasReport)
    ensures
        0 <= r.saved_total() <= r.before_total(),
        r.before_total() - r.after_total() <= r.saved_total(),
{
    lemma_saved_le_before(r.entries@, r.entries@.len() as int);
}

/// When no fix raises the cost of its pattern, the total saved is exactly the
/// total before minus the total after.
pub proof fn law_savings_exact_when_no_regression(r: GasReport)
    requires
        forall|i: int|
            0 <= i < r.entries@.len() ==> (#[trigger] r.entries@[i]).after_gas
                <= r.entries@[i].before_gas,
    ensures
        r.saved_total() == r.before_total() - r.after_total(),
{
    lemma_exact(r.entries@, r.entries@.len() as int);
}

proof fn lemma_exact(es: Seq<PatternGasCost>, n: int)
    requires
        0 <= n <= es.len(),
        forall|i: int| 0 <= i < es.len() ==> (#[trigger] es[i]).after_gas <= es[i].before_gas,
    ensures
        sum_saved(es, n) == sum_before(es, n) - sum_after(es, n),
    decreases n,
{
    if n > 0 {
        lemma_exact(es, n - 1);
        assert(es[n - 1].after_gas <= es[n - 1].before_gas);
    }
}

/// Adding an entry adds its own figures to each total.
pub proof fn law_push_adds(r: GasReport, e: PatternGasCost)
    ensures
        ({
            let es = r.entries@.push(e);
            &&& sum_before(es, es.len() as int) == r.before_total() + e.before_gas
            &&& sum_after(es, es.len() as int) == r.after_total() + e.after_gas
            &&& sum_saved(es, es.len() as int) == r.saved_total() + saved(e)
        }),
{
    lemma_prefix_sums(r.entries@, e, r.entries@.len() as int);
}

proof fn lemma_prefix_sums(es: Seq<PatternGasCost>, e: PatternGasCost, n: int)
    requires
        0 <= n <= es.len(),
    ensures
        sum_before(es.push(e), n) == sum_before(es, n),
        sum_after(es.push(e), n) == sum_after(es, n),
        sum_saved(es.push(e), n) == sum_saved(es, n),
    decreases n,
{
    if n > 0 {
        lemma_prefix_sums(es, e, n - 1);
        assert(es.push(e)[n - 1] == es[n - 1]);
    }
}

} // verus!
