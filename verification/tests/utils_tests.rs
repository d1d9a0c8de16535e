use usync::utils::{
    fallback_after, get_buffer_size, judge_kernel_copy, plan_buffered, ram_copy_warrants_warning,
    select_strategy, Condition, KernelCopyVerdict, OpenMode, Platform,
    StrategyRegistry, StrategyRule, StreamProgress, TransferStrategy,
};

#[test]
fn test_get_buffer_size() {
    assert_eq!(get_buffer_size(500_000), 8 * 1024);
    assert_eq!(get_buffer_size(2_000_000), 64 * 1024);
}

#[test]
fn buffer_size_changes_right_above_one_mebibyte() {
    assert_eq!(get_buffer_size(0), 8192);
    assert_eq!(get_buffer_size(1_048_576), 8192);
    assert_eq!(get_buffer_size(1_048_577), 65536);
    assert_eq!(get_buffer_size(u64::MAX), 65536);
}

#[test]
fn ram_flag_forces_the_in_memory_strategy() {
    for platform in [Platform::ZeroCopyCapable, Platform::KernelCopyCapable, Platform::Plain] {
        for size in [0, 1_048_576, 1_048_577, u64::MAX] {
            assert_eq!(select_strategy(true, size, platform), TransferStrategy::InMemory);
        }
    }
}

#[test]
fn large_files_go_through_the_kernel_where_the_platform_can() {
    assert_eq!(
        select_strategy(false, 1_048_577, Platform::ZeroCopyCapable),
        TransferStrategy::ZeroCopy
    );
    assert_eq!(
        select_strategy(false, 1_048_577, Platform::KernelCopyCapable),
        TransferStrategy::KernelCopy
    );
    assert_eq!(select_strategy(false, 1_048_577, Platform::Plain), TransferStrategy::Buffered);
    assert_eq!(
        select_strategy(false, 1_048_576, Platform::ZeroCopyCapable),
        TransferStrategy::Buffered
    );
    assert_eq!(
        select_strategy(false, 10, Platform::KernelCopyCapable),
        TransferStrategy::Buffered
    );
}

#[test]
fn buffered_copy_is_the_last_resort() {
    assert_eq!(fallback_after(TransferStrategy::ZeroCopy), Some(TransferStrategy::Buffered));
    assert_eq!(fallback_after(TransferStrategy::KernelCopy), Some(TransferStrategy::Buffered));
    assert_eq!(fallback_after(TransferStrategy::Buffered), None);
    assert_eq!(fallback_after(TransferStrategy::InMemory), None);
}

#[test]
fn ram_warning_starts_above_a_hundred_mebibytes() {
    assert!(!ram_copy_warrants_warning(0));
    assert!(!ram_copy_warrants_warning(100 * 1024 * 1024));
    assert!(ram_copy_warrants_warning(100 * 1024 * 1024 + 1));
}

#[test]
fn buffered_copy_resumes_in_place_only_into_a_destination_that_is_there() {
    let fresh = plan_buffered(2_000_000, 0, true);
    assert_eq!(fresh.buffer_size, 65536);
    assert_eq!(fresh.open_mode, OpenMode::Truncate);
    assert_eq!(fresh.seek_to, 0);

    let resumed = plan_buffered(100, 40, true);
    assert_eq!(resumed.buffer_size, 8192);
    assert_eq!(resumed.open_mode, OpenMode::InPlace);
    assert_eq!(resumed.seek_to, 40);

    let restarted = plan_buffered(100, 40, false);
    assert_eq!(restarted.open_mode, OpenMode::Truncate);
    assert_eq!(restarted.seek_to, 40);
}

#[test]
fn stream_progress_counts_from_the_resume_offset() {
    let plan = plan_buffered(100, 40, true);
    let mut progress = StreamProgress::start(&plan);
    assert_eq!(progress.total, 40);
    assert!(progress.after_read(50));
    assert_eq!(progress.total, 90);
    assert!(progress.after_read(10));
    assert_eq!(progress.total, 100);
    assert!(!progress.after_read(0));
    assert_eq!(progress.total, 100);
}

#[test]
fn stream_progress_stays_at_the_largest_count() {
    let mut progress = StreamProgress { total: u64::MAX - 1 };
    assert!(progress.after_read(5));
    assert_eq!(progress.total, u64::MAX);
}

#[test]
fn kernel_copy_stands_only_with_the_size_of_the_source() {
    assert_eq!(judge_kernel_copy(true, 10, Some(10)), KernelCopyVerdict::Accept(10));
    assert_eq!(judge_kernel_copy(true, 0, Some(0)), KernelCopyVerdict::Accept(0));
    assert_eq!(judge_kernel_copy(true, 10, Some(9)), KernelCopyVerdict::Fallback);
    assert_eq!(judge_kernel_copy(true, 10, None), KernelCopyVerdict::Fallback);
    assert_eq!(judge_kernel_copy(false, 10, Some(10)), KernelCopyVerdict::Fallback);
}

#[test]
fn registry_of_a_platform_follows_the_selection_policy() {
    for platform in [Platform::ZeroCopyCapable, Platform::KernelCopyCapable, Platform::Plain] {
        let registry = StrategyRegistry::for_platform(platform);
        for use_ram in [false, true] {
            for size in [0, 1_048_576, 1_048_577, u64::MAX] {
                assert_eq!(registry.select(use_ram, size), select_strategy(use_ram, size, platform));
            }
        }
    }
}

#[test]
fn rule_put_on_top_of_a_registry_is_looked_at_first() {
    let plain = StrategyRegistry::for_platform(Platform::Plain);
    assert_eq!(plain.select(false, 5_000), TransferStrategy::Buffered);
    let with_kernel = plain.with_rule(StrategyRule {
        when: Condition::LargerThan(1_000),
        strategy: TransferStrategy::KernelCopy,
    });
    assert_eq!(with_kernel.select(false, 1_000), TransferStrategy::Buffered);
    assert_eq!(with_kernel.select(false, 1_001), TransferStrategy::KernelCopy);
    // The new rule stands above the one for in-memory copies.
    assert_eq!(with_kernel.select(true, 1_001), TransferStrategy::KernelCopy);
    assert_eq!(with_kernel.select(true, 10), TransferStrategy::InMemory);
    let always = with_kernel.with_rule(StrategyRule {
        when: Condition::Always,
        strategy: TransferStrategy::ZeroCopy,
    });
    assert_eq!(always.select(true, 0), TransferStrategy::ZeroCopy);
    assert_eq!(always.select(false, u64::MAX), TransferStrategy::ZeroCopy);
    let never = plain.with_rule(StrategyRule {
        when: Condition::LargerThan(u64::MAX),
        strategy: TransferStrategy::ZeroCopy,
    });
    assert_eq!(never.select(false, u64::MAX), TransferStrategy::Buffered);
}
