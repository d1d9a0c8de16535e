use crate::copy::{add_bytes, capped_u64};
use vstd::prelude::*;

verus! {

/// Files strictly larger than this many bytes count as large: they get the
/// big streaming buffer and are candidates for kernel-side transfer.
pub const LARGE_FILE_THRESHOLD: u64 = 1_048_576;

/// Streaming buffer for large files (64 KiB).
pub const LARGE_BUFFER: usize = 65_536;

/// Streaming buffer for everything else (8 KiB).
pub const SMALL_BUFFER: usize = 8_192;

/// Size of the read/write buffer used when streaming a file of `file_size` bytes.
pub open spec fn buffer_size_for(file_size: u64) -> usize {
    if file_size > LARGE_FILE_THRESHOLD {
        LARGE_BUFFER
    } else {
        SMALL_BUFFER
    }
}

/// Picks the buffer size for a buffered copy of a file of `file_size` bytes.
pub fn get_buffer_size(file_size: u64) -> (size: usize)
    ensures
        size == buffer_size_for(file_size),
        size > 0,
{
    if file_size > LARGE_FILE_THRESHOLD {
        LARGE_BUFFER
    } else {
        SMALL_BUFFER
    }
}

/// Files strictly larger than this many bytes make an in-memory copy worth a
/// warning (100 MiB): the copy holds the whole file in memory.
pub const RAM_WARNING_THRESHOLD: u64 = 104_857_600;

/// A way of moving the bytes of one local file to another.
#[derive(Debug, Clone, Copy, PartialEq, Eq, Structural)]
pub enum TransferStrategy {
    /// Stream through a buffer sized to the file. Works everywhere.
    Buffered,
    /// Read the whole file into memory, then write it out in one call.
    InMemory,
    /// Let the kernel move the data from one open file to the other.
    ZeroCopy,
    /// Let the kernel copy the file as a whole, by its path.
    KernelCopy,
}

/// Which kernel-side transfer the platform offers.
#[derive(Debug, Clone, Copy, PartialEq, Eq, Structural)]
pub enum Platform {
    /// Data can be sent from one open file to another inside the kernel.
    ZeroCopyCapable,
    /// The system can copy a whole file by its path.
    KernelCopyCapable,
    /// Neither.
    Plain,
}

/// The strategy to try first: in memory where that is asked for; else, for a
/// large file, what the platform's kernel offers; else buffered.
pub open spec fn preferred_strategy(use_ram: bool, size: u64, platform: Platform) -> TransferStrategy {
    if use_ram {
        TransferStrategy::InMemory
    } else if size > LARGE_FILE_THRESHOLD {
        match platform {
            Platform::ZeroCopyCapable => TransferStrategy::ZeroCopy,
            Platform::KernelCopyCapable => TransferStrategy::KernelCopy,
            Platform::Plain => TransferStrategy::Buffered,
        }
    } else {
        TransferStrategy::Buffered
    }
}

/// The strategy to go on with when `failed` did not work: buffered after a
/// kernel-side transfer, none after the other two.
pub open spec fn fallback_of(failed: TransferStrategy) -> Option<TransferStrategy> {
    match failed {
        TransferStrategy::ZeroCopy | TransferStrategy::KernelCopy => Some(TransferStrategy::Buffered),
        TransferStrategy::Buffered | TransferStrategy::InMemory => None,
    }
}

/// Picks the strategy to try first for a file of `size` bytes.
pub fn select_strategy(use_ram: bool, size: u64, platform: Platform) -> (strategy: TransferStrategy)
    ensures
        strategy == preferred_strategy(use_ram, size, platform),
{
    if use_ram {
        TransferStrategy::InMemory
    } else if size > LARGE_FILE_THRESHOLD {
        match platform {
            Platform::ZeroCopyCapable => TransferStrategy::ZeroCopy,
            Platform::KernelCopyCapable => TransferStrategy::KernelCopy,
            Platform::Plain => TransferStrategy::Buffered,
        }
    } else {
        TransferStrategy::Buffered
    }
}

/// Picks the strategy to go on with after `failed` did not work.
pub fn fallback_after(failed: TransferStrategy) -> (next: Option<TransferStrategy>)
    ensures
        next == fallback_of(failed),
{
    match failed {
        TransferStrategy::ZeroCopy | TransferStrategy::KernelCopy => Some(TransferStrategy::Buffered),
        TransferStrategy::Buffered | TransferStrategy::InMemory => None,
    }
}

/// When a rule of a registry applies to a file.
#[derive(Debug, Clone, Copy, PartialEq, Eq, Structural)]
pub enum Condition {
    /// An in-memory copy is asked for.
    RamRequested,
    /// The file is larger than so many bytes.
    LargerThan(u64),
    /// Always.
    Always,
}

/// One rule of a registry: the strategy to use when the condition holds.
#[derive(Debug, Clone, Copy, PartialEq, Eq, Structural)]
pub struct StrategyRule {
    pub when: Condition,
    pub strategy: TransferStrategy,
}

/// Whether `when` holds for a file of `size` bytes.
pub open spec fn condition_holds(when: Condition, use_ram: bool, size: u64) -> bool {
    match when {
        Condition::RamRequested => use_ram,
        Condition::LargerThan(limit) => size > limit,
        Condition::Always => true,
    }
}

/// The strategy of the first of `rules` whose condition holds; buffered where
/// none does.
pub open spec fn first_applicable(rules: Seq<StrategyRule>, use_ram: bool, size: u64) -> TransferStrategy
    decreases rules.len(),
{
    if rules.len() == 0 {
        TransferStrategy::Buffered
    } else if condition_holds(rules.first().when, use_ram, size) {
        rules.first().strategy
    } else {
        first_applicable(rules.drop_first(), use_ram, size)
    }
}

/// The rule that closes every registry: the buffered strategy, always.
pub open spec fn last_resort() -> StrategyRule {
    StrategyRule { when: Condition::Always, strategy: TransferStrategy::Buffered }
}

/// The rules for a platform: in memory where asked for; then, where the
/// platform has a kernel-side transfer, that one for large files; then
/// buffered.
pub open spec fn standard_rules(platform: Platform) -> Seq<StrategyRule> {
    let ram = StrategyRule { when: Condition::RamRequested, strategy: TransferStrategy::InMemory };
    let large = Condition::LargerThan(LARGE_FILE_THRESHOLD);
    match platform {
        Platform::ZeroCopyCapable => seq![
            ram,
            StrategyRule { when: large, strategy: TransferStrategy::ZeroCopy },
            last_resort(),
        ],
        Platform::KernelCopyCapable => seq![
            ram,
            StrategyRule { when: large, strategy: TransferStrategy::KernelCopy },
            last_resort(),
        ],
        Platform::Plain => seq![ram, last_resort()],
    }
}

/// Rules for picking a transfer strategy, looked at from the top. The last
/// rule is always the buffered strategy without condition, so that every file
/// gets a strategy.
pub struct StrategyRegistry {
    rules: Vec<StrategyRule>,
}

impl StrategyRegistry {
    /// The rules, from the top.
    pub closed spec fn rules(&self) -> Seq<StrategyRule> {
        self.rules@
    }

    #[verifier::type_invariant]
    spec fn ends_in_last_resort(&self) -> bool {
        self.rules@.len() > 0 && self.rules@.last() == last_resort()
    }

    /// The registry for a platform.
    pub fn for_platform(platform: Platform) -> (registry: Self)
        ensures
            registry.rules() == standard_rules(platform),
    {
        let mut rules: Vec<StrategyRule> = Vec::new();
        rules.push(
            StrategyRule { when: Condition::RamRequested, strategy: TransferStrategy::InMemory },
        );
        match platform {
            Platform::ZeroCopyCapable => {
                rules.push(
                    StrategyRule {
                        when: Condition::LargerThan(LARGE_FILE_THRESHOLD),
                        strategy: TransferStrategy::ZeroCopy,
                    },
                );
            },
            Platform::KernelCopyCapable => {
                rules.push(
                    StrategyRule {
                        when: Condition::LargerThan(LARGE_FILE_THRESHOLD),
                        strategy: TransferStrategy::KernelCopy,
                    },
                );
            },
            Platform::Plain => {},
        }
        rules.push(StrategyRule { when: Condition::Always, strategy: TransferStrategy::Buffered });
        assert(rules@ =~= standard_rules(platform));
        StrategyRegistry { rules }
    }

    /// The same registry with `rule` put on top, where it is looked at
    /// before all others.
    pub fn with_rule(&self, rule: StrategyRule) -> (registry: Self)
        ensures
            registry.rules() == seq![rule] + self.rules(),
    {
        proof {
            use_type_invariant(self);
        }
        let mut rules: Vec<StrategyRule> = Vec::new();
        rules.push(rule);
        let mut i: usize = 0;
        while i < self.rules.len()
            invariant
                i <= self.rules@.len(),
                rules@ == seq![rule] + self.rules@.take(i as int),
            decreases self.rules@.len() - i,
        {
            rules.push(self.rules[i]);
            assert(rules@ =~= seq![rule] + self.rules@.take(i + 1));
            i += 1;
        }
        assert(self.rules@.take(self.rules@.len() as int) == self.rules@);
        StrategyRegistry { rules }
    }

    /// Picks the strategy for a file of `size` bytes: that of the first rule
    /// whose condition holds.
    pub fn select(&self, use_ram: bool, size: u64) -> (strategy: TransferStrategy)
        ensures
            strategy == first_applicable(self.rules(), use_ram, size),
    {
        let mut i: usize = 0;
        assert(self.rules@.skip(0) == self.rules@);
        while i < self.rules.len()
            invariant
                i <= self.rules@.len(),
                first_applicable(self.rules@, use_ram, size) == first_applicable(
                    self.rules@.skip(i as int),
                    use_ram,
                    size,
                ),
            decreases self.rules@.len() - i,
        {
            let rule = self.rules[i];
            let ghost rest = self.rules@.skip(i as int);
            assert(rest.first() == rule);
            assert(rest.drop_first() == self.rules@.skip(i + 1));
            let holds = match rule.when {
                Condition::RamRequested => use_ram,
                Condition::LargerThan(limit) => size > limit,
                Condition::Always => true,
            };
            if holds {
                return rule.strategy;
            }
            i += 1;
        }
        TransferStrategy::Buffered
    }
}

/// The registry of a platform picks what the selection policy prefers.
pub proof fn lemma_standard_rules_follow_policy(use_ram: bool, size: u64, platform: Platform)
    ensures
        first_applicable(standard_rules(platform), use_ram, size) == preferred_strategy(
            use_ram,
            size,
            platform,
        ),
{
    let rules = standard_rules(platform);
    reveal_with_fuel(first_applicable, 4);
    assert(rules.drop_first().first() == rules[1]);
    if rules.len() == 3 {
        assert(rules.drop_first().drop_first().first() == rules[2]);
    }
}

/// Whether an in-memory copy of a file of `size` bytes deserves a warning.
pub fn ram_copy_warrants_warning(size: u64) -> (warn: bool)
    ensures
        warn == (size > RAM_WARNING_THRESHOLD),
{
    size > RAM_WARNING_THRESHOLD
}

/// How the destination of a buffered copy is opened.
#[derive(Debug, Clone, Copy, PartialEq, Eq, Structural)]
pub enum OpenMode {
    /// Created, or emptied if it is there.
    Truncate,
    /// Opened for writing with its content kept.
    InPlace,
}

/// How a buffered copy is set up.
#[derive(Debug, Clone, Copy, PartialEq, Eq, Structural)]
pub struct BufferedPlan {
    pub buffer_size: usize,
    pub open_mode: OpenMode,
    /// Where both files are positioned before streaming; 0 is the start.
    pub seek_to: u64,
}

/// Sets up a buffered copy of a source of `src_size` bytes that continues at
/// `resume_from`. A copy that resumes into a destination that is there writes
/// in place; any other starts from an empty destination.
pub fn plan_buffered(src_size: u64, resume_from: u64, dst_present: bool) -> (plan: BufferedPlan)
    ensures
        plan.buffer_size == buffer_size_for(src_size),
        plan.seek_to == resume_from,
        plan.open_mode == if resume_from > 0 && dst_present {
            OpenMode::InPlace
        } else {
            OpenMode::Truncate
        },
{
    BufferedPlan {
        buffer_size: get_buffer_size(src_size),
        open_mode: if resume_from > 0 && dst_present {
            OpenMode::InPlace
        } else {
            OpenMode::Truncate
        },
        seek_to: resume_from,
    }
}

/// The byte count of a buffered copy while it streams.
pub struct StreamProgress {
    pub total: u64,
}

impl StreamProgress {
    /// Progress of a copy that starts at `plan.seek_to`: the bytes before that
    /// offset count as written.
    pub fn start(plan: &BufferedPlan) -> (progress: Self)
        ensures
            progress.total == plan.seek_to,
    {
        Self { total: plan.seek_to }
    }

    /// Takes note of one read of `bytes_read` bytes. A read of nothing is the
    /// end of the file: the answer is `false` and the stream is to be flushed.
    /// Any other read is to be written out in full, and the answer is `true`.
    pub fn after_read(&mut self, bytes_read: usize) -> (more: bool)
        ensures
            more == (bytes_read > 0),
            final(self).total == capped_u64(old(self).total + bytes_read),
    {
        if bytes_read == 0 {
            return false;
        }
        self.total = add_bytes(self.total, bytes_read as u64);
        true
    }
}

/// What to make of a whole-file kernel copy.
#[derive(Debug, Clone, Copy, PartialEq, Eq, Structural)]
pub enum KernelCopyVerdict {
    /// The copy stands; so many bytes were written.
    Accept(u64),
    /// The copy is not to be relied on: copy again, buffered.
    Fallback,
}

/// Judges a whole-file kernel copy of a source of `src_size` bytes. It stands
/// when the call succeeded and the destination now has the size of the source.
pub fn judge_kernel_copy(call_succeeded: bool, src_size: u64, dst_size: Option<u64>) -> (verdict:
    KernelCopyVerdict)
    ensures
        verdict == if call_succeeded && dst_size == Some(src_size) {
            KernelCopyVerdict::Accept(src_size)
        } else {
            KernelCopyVerdict::Fallback
        },
{
    if !call_succeeded {
        return KernelCopyVerdict::Fallback;
    }
    match dst_size {
        Some(size) => if size == src_size {
            KernelCopyVerdict::Accept(src_size)
        } else {
            KernelCopyVerdict::Fallback
        },
        None => KernelCopyVerdict::Fallback,
    }
}

} // verus!
