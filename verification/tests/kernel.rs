use tuff_radical::arch::x86_64::cpu::{log_features as log_all_features, CpuFeatures, FeatureValue, SimdState};
use tuff_radical::arch::x86_64::interrupts::{
    advance_cooperative_tick, current_tick, init_idt, keyboard_action, KeyAction, interrupt_timer_ready, register_timer_waker,
    set_interrupt_timer_ready, sleep_target, timer_interrupt, wake_due_timer_waiters, IdtHandler,
    InterruptIndex, TimerState,
};
use tuff_radical::arch::x86_64::registers::{join_halves, split_halves, Msr};
use tuff_radical::arch::x86_64::syscall::{efer_with_sce, star_value, user_selector};
use tuff_radical::arch::x86_64::user::{hello_entry_frame, hello_program, user_entry_frame};
use tuff_radical::boot::{
    bar0_memory_base, framebuffer_address, function_roles, scan_yields_after, sleep_ready,
    worker_base_sleep, worker_heartbeat_due,
};
use tuff_radical::cpu as first_probe;
use tuff_radical::drivers::pci::{device_from_config, PciAddress, PciBar};
use tuff_radical::interrupts as pic;
use tuff_radical::memory::{
    allocate_page, init_memory, HeapPiece, MemoryDescriptor, MemoryInitError, PhysicalMemoryManager,
    CONVENTIONAL,
};
use tuff_radical::task::executor::{idle_action, Executor, IdleAction, ReadyQueue};
use tuff_radical::task::telemetry::{log_heartbeat, Telemetry};

fn region(ty: u32, phys_start: u64, page_count: u64) -> MemoryDescriptor {
    MemoryDescriptor { ty, phys_start, virt_start: 0, page_count, att: 0 }
}

#[test]
fn idt_routes_timer_and_keyboard() {
    let table = init_idt();
    assert_eq!(table.len(), 224);
    assert_eq!(table[0], (32, IdtHandler::Timer));
    assert_eq!(table[1], (33, IdtHandler::Keyboard));
    assert_eq!(table[2], (34, IdtHandler::Ignore));
    assert_eq!(table[223], (255, IdtHandler::Ignore));
    let legacy = pic::init_idt();
    assert_eq!(legacy.len(), 224);
    assert_eq!(legacy[0], (32, pic::IdtHandler::Timer));
    assert_eq!(legacy[1], (33, pic::IdtHandler::Ignore));
    assert_eq!(pic::catch_all_eoi_vectors(), (40, 32));
    assert_eq!(InterruptIndex::Keyboard.as_u8(), 33);
    assert_eq!(InterruptIndex::Timer.as_usize(), 32);
}

#[test]
fn timer_waiters_wake_when_due() {
    let mut state = TimerState::new();
    assert_eq!(current_tick(&state), 0);
    assert!(!interrupt_timer_ready(&state));
    set_interrupt_timer_ready(&mut state, true);
    assert!(interrupt_timer_ready(&state));
    assert!(!register_timer_waker(&mut state, 2, 7));
    assert!(!register_timer_waker(&mut state, 1, 8));
    assert!(register_timer_waker(&mut state, 0, 9));
    assert!(wake_due_timer_waiters(&mut state).is_empty());
    let woken = timer_interrupt(&mut state);
    assert_eq!(current_tick(&state), 1);
    assert_eq!(woken, vec![8]);
    let (tick, woken) = advance_cooperative_tick(&mut state);
    assert_eq!((tick, woken), (2, vec![7]));
    assert_eq!(sleep_target(10, 5), 15);
}

#[test]
fn feature_log_lines() {
    let mut f = CpuFeatures::default();
    f.logical_threads = 4;
    f.has_sse = true;
    f.simd_enabled = true;
    let lines = log_all_features(&f);
    assert_eq!(lines.len(), 13);
    assert_eq!(lines[0].label, "  LOGICAL THREADS: ");
    assert!(matches!(lines[0].value, FeatureValue::Count(4)));
    assert!(matches!(lines[2].value, FeatureValue::Text("SUPPORTED")));
    assert!(matches!(lines[3].value, FeatureValue::Text("MISSING (Sub-optimal SIMD)")));
    assert!(matches!(lines[10].value, FeatureValue::Text("YES")));
    assert!(matches!(lines[12].value, FeatureValue::Text("NO")));

    let mut g = first_probe::CpuFeatures::default();
    g.has_avx = true;
    let short = first_probe::log_features(&g);
    assert_eq!(short.len(), 6);
    assert!(matches!(short[1].value, FeatureValue::Text("SUPPORTED")));
    assert!(matches!(short[2].value, FeatureValue::Text("MISSING")));
}

#[test]
fn simd_state_starts_zeroed() {
    let s = SimdState::new();
    assert!(s.buffer.iter().all(|&b| b == 0));
}

#[test]
fn register_helpers() {
    assert_eq!(join_halves(0x1234_5678, 0x9ABC_DEF0), 0x1234_5678_9ABC_DEF0);
    assert_eq!(split_halves(0x1234_5678_9ABC_DEF0), (0x9ABC_DEF0, 0x1234_5678));
    assert_eq!(Msr::new(0xC000_0080).reg(), 0xC000_0080);
    assert_eq!(star_value(0x08, 0x10), 0x0013_0008_0000_0000);
    assert_eq!(efer_with_sce(0x500), 0x501);
    assert_eq!(user_selector(0x18), 0x1B);
}

#[test]
fn ring3_entry_frame() {
    let f = user_entry_frame(0x1000, 0x2000, 0x18, 0x20);
    assert_eq!((f.ss, f.rsp, f.rflags, f.cs, f.rip), (0x23, 0x2000, 0x202, 0x1B, 0x1000));
    let h = hello_entry_frame(0x18, 0x20);
    assert_eq!((h.rip, h.rsp), (0x1000_0000, 0x2000_1000));
    let p = hello_program();
    assert_eq!(p.len(), 18);
    assert_eq!(&p[14..], &[0x0F, 0x05, 0xEB, 0xFE]);
}

#[test]
fn boot_decisions() {
    assert_eq!(worker_base_sleep(0), 50);
    assert_eq!(worker_base_sleep(3), 95);
    assert!(worker_heartbeat_due(2000));
    assert!(!worker_heartbeat_due(1999));
    assert!(sleep_ready(10, 10));
    assert!(!sleep_ready(9, 10));
    assert!(scan_yields_after(0));
    assert!(scan_yields_after(32));
    assert!(!scan_yields_after(33));
    let addr = PciAddress { bus: 0, slot: 2, func: 0 };
    let display = device_from_config(addr, 0x1111_1234, 0x0300_0000).unwrap();
    let roles = function_roles(&display);
    assert!(roles.display && !roles.virtio_block);
    let disk = device_from_config(addr, 0x1001_1AF4, 0x0100_0000).unwrap();
    let roles = function_roles(&disk);
    assert!(!roles.display && roles.virtio_block);
    assert_eq!(bar0_memory_base(Some(PciBar::Memory32 { base: 0xFD00_0000, size: 16 })), Some(0xFD00_0000));
    assert_eq!(bar0_memory_base(Some(PciBar::Memory64 { base: 0x1_0000_0000, size: 16 })), Some(0x1_0000_0000));
    assert_eq!(bar0_memory_base(Some(PciBar::Io { base: 0xC000, size: 16 })), None);
    assert_eq!(bar0_memory_base(None), None);
    assert_eq!(framebuffer_address(0xFD00_000F), 0xFD00_0000);
}

#[test]
fn heartbeat_every_thousand_ticks() {
    let mut t = Telemetry::new();
    t.total_polls = 5;
    assert!(log_heartbeat(&mut t, 999).is_none());
    let beat = log_heartbeat(&mut t, 1000).unwrap();
    assert_eq!((beat.tick, beat.polls, beat.spawned, beat.completed), (1000, 5, 0, 0));
    assert_eq!(t.last_heartbeat_tick, 1000);
    assert!(log_heartbeat(&mut t, 1999).is_none());
    assert!(log_heartbeat(&mut t, 2000).is_some());
}

#[test]
fn ready_queue_is_fifo_without_repeats() {
    let mut q = ReadyQueue::new();
    assert!(q.is_empty());
    assert!(q.enqueue(1));
    assert!(q.enqueue(2));
    assert!(!q.enqueue(1));
    assert_eq!(q.next_task(), Some(1));
    assert!(q.enqueue(1));
    assert_eq!(q.next_task(), Some(2));
    assert_eq!(q.next_task(), Some(1));
    assert_eq!(q.next_task(), None);
}

#[test]
fn executor_skips_finished_tasks() {
    let mut e = Executor::new();
    assert!(e.spawn(7));
    assert!(!e.spawn(7));
    assert!(e.spawn(8));
    assert_eq!(e.next_ready(), Some(7));
    assert!(e.wake(7));
    e.complete(7);
    assert_eq!(e.next_ready(), Some(8));
    assert!(e.has_ready());
    assert_eq!(e.next_ready(), None);
    assert!(!e.has_ready());
    assert_eq!(idle_action(false, true), IdleAction::RunReady);
    assert_eq!(idle_action(true, true), IdleAction::HaltUntilInterrupt);
    assert_eq!(idle_action(true, false), IdleAction::CooperativeTick);
}

#[test]
fn memory_plan_and_page_allocation() {
    let map = vec![
        region(CONVENTIONAL, 0x1000, 16),
        region(2, 0x10_0000, 100),
        region(CONVENTIONAL, 0x100_0000, 0x3FF1),
        region(CONVENTIONAL, 0x8000_0000, 2),
    ];
    let (plan, pmm) = init_memory(&map).unwrap();
    assert_eq!(plan.stored_descriptors, 4);
    assert_eq!(plan.conventional_pages, 16 + 0x3FF1 + 2);
    assert_eq!(
        plan.heap_pieces,
        vec![
            HeapPiece { start: 0x1000, len: 0x1_0000 },
            HeapPiece { start: 0x100_0000, len: 0x3FF_0000 },
        ]
    );
    let mut slot = Some(pmm);
    assert_eq!(allocate_page(&mut slot, &map), Some(0x4FF_0000));
    assert_eq!(allocate_page(&mut slot, &map), Some(0x8000_0000));
    assert_eq!(allocate_page(&mut slot, &map), Some(0x8000_1000));
    assert_eq!(allocate_page(&mut slot, &map), None);
    let mut none: Option<PhysicalMemoryManager> = None;
    assert_eq!(allocate_page(&mut none, &map), None);
}

#[test]
fn heap_spans_regions_none_of_which_holds_it_alone() {
    let map = vec![region(CONVENTIONAL, 0x10_0000, 10000), region(CONVENTIONAL, 0x1_0000_0000, 10000)];
    let (plan, pmm) = init_memory(&map).unwrap();
    assert_eq!(plan.conventional_pages, 20000);
    assert_eq!(
        plan.heap_pieces,
        vec![
            HeapPiece { start: 0x10_0000, len: 10000 * 4096 },
            HeapPiece { start: 0x1_0000_0000, len: 64 * 1024 * 1024 - 10000 * 4096 },
        ]
    );
    let total: u64 = plan.heap_pieces.iter().map(|p| p.len).sum();
    assert_eq!(total, 64 * 1024 * 1024);
    let mut slot = Some(pmm);
    assert_eq!(allocate_page(&mut slot, &map), Some(0x1_0000_0000 + 64 * 1024 * 1024 - 10000 * 4096));
}

#[test]
fn memory_init_errors() {
    assert_eq!(init_memory(&[]).err(), Some(MemoryInitError::EmptySnapshot));
    assert_eq!(
        init_memory(&[region(2, 0, 10)]).err(),
        Some(MemoryInitError::NoConventionalMemory { stored_descriptors: 1, conventional_pages: 0 })
    );
    assert_eq!(
        init_memory(&[region(CONVENTIONAL, 0, 10)]).err(),
        Some(MemoryInitError::NotEnoughMemory { conventional_pages: 10 })
    );
}

#[test]
fn escape_stops_other_keys_are_reported() {
    assert_eq!(keyboard_action(0x01), KeyAction::EmergencyStop);
    assert_eq!(keyboard_action(0x1E), KeyAction::Report(0x1E));
}
